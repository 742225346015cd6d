use argscan::CLI;

fn strings(items: &[&str]) -> Vec<String> {
    items.iter().map(|s| s.to_string()).collect()
}

#[test]
fn option_takes_following_value() {
    let mut cli = CLI::new();
    cli.option("-r, --run", "Run it").unwrap();
    let out = cli.parse(&strings(&["-r", "fast"]));
    assert_eq!(out, "");
    assert_eq!(cli.get("--run"), Some(&strings(&["fast"])[..]));
    assert_eq!(cli.options[0].value, Some("fast".to_string()));
}

#[test]
fn option_before_another_option_is_a_flag() {
    let mut cli = CLI::new();
    cli.option("-r, --run", "Run it").unwrap().option("-x, --extra", "More").unwrap();
    cli.parse(&strings(&["-r", "-x"]));
    assert_eq!(cli.get("--run"), Some(&strings(&[""])[..]));
    assert_eq!(cli.get("--extra"), Some(&strings(&[""])[..]));
}

#[test]
fn option_before_unknown_dashed_token_is_a_flag() {
    let mut cli = CLI::new();
    cli.option("-r, --run", "Run it").unwrap();
    cli.parse(&strings(&["-r", "-x", "later"]));
    assert_eq!(cli.get("--run"), Some(&strings(&[""])[..]));
}

#[test]
fn option_at_the_end_is_a_flag() {
    let mut cli = CLI::new();
    cli.option("-r, --run", "Run it").unwrap();
    cli.parse(&strings(&["--run"]));
    assert_eq!(cli.get("--run"), Some(&strings(&[""])[..]));
}

#[test]
fn positional_captures_until_next_option() {
    let mut cli = CLI::new();
    cli.arg("build", "build [targets]", "Build").option("--flag", "A flag").unwrap();
    cli.parse(&strings(&["build", "a", "b", "--flag"]));
    assert_eq!(cli.args[0].values, strings(&["a", "b", ""]));
    assert_eq!(cli.get("build"), Some(&strings(&["a", "b", ""])[..]));
    assert_eq!(cli.get("--flag"), Some(&strings(&[""])[..]));
}

#[test]
fn positional_without_values_holds_the_terminator() {
    let mut cli = CLI::new();
    cli.arg("build", "build", "Build");
    cli.parse(&strings(&["build"]));
    assert_eq!(cli.get("build"), Some(&strings(&[""])[..]));
    cli.parse(&strings(&["build", "-q", "build", "x"]));
    assert_eq!(cli.args[0].values, strings(&["", "", "x", ""]));
}

#[test]
fn help_token_renders_name_and_version() {
    let mut cli = CLI::new();
    cli.name("demo").version("1.2.0");
    let out = cli.parse(&strings(&["--help"]));
    assert!(out.contains("demo"));
    assert!(out.contains("1.2.0"));
    assert_eq!(out, cli.render_help());
}

#[test]
fn banners_do_not_stop_the_scan() {
    let mut cli = CLI::new();
    cli.name("demo").version("1.2.0").option("-r, --run", "Run it").unwrap();
    let out = cli.parse(&strings(&["-h", "-r", "fast", "-v", "--version", "--help"]));
    let help = cli.render_help();
    let version = cli.render_version();
    assert_eq!(out, format!("{}{}{}{}", help, version, version, help));
    assert_eq!(cli.get("--run"), Some(&strings(&["fast"])[..]));
}

#[test]
fn built_in_tokens_come_before_declarations() {
    let mut cli = CLI::new();
    cli.option("-v, --verbose", "Say more").unwrap().option("-h, --host", "Host").unwrap();
    let out = cli.parse(&strings(&["-v", "x", "-h", "y"]));
    assert_eq!(out, format!("{}{}", cli.render_version(), cli.render_help()));
    assert_eq!(cli.get("--verbose"), None);
    assert_eq!(cli.get("--host"), None);
    cli.parse(&strings(&["--verbose", "x", "--host", "y"]));
    assert_eq!(cli.get("--verbose"), Some(&strings(&["x"])[..]));
    assert_eq!(cli.get("--host"), Some(&strings(&["y"])[..]));
}

#[test]
fn later_occurrence_wins() {
    let mut cli = CLI::new();
    cli.option("-r, --run", "Run it").unwrap();
    cli.parse(&strings(&["-r", "one", "--run", "two"]));
    assert_eq!(cli.get("--run"), Some(&strings(&["two"])[..]));
    cli.parse(&strings(&["-r"]));
    assert_eq!(cli.get("--run"), Some(&strings(&[""])[..]));
}

#[test]
fn unknown_tokens_are_passed_over() {
    let mut cli = CLI::new();
    cli.option("-r, --run", "Run it").unwrap().arg("build", "build", "Build");
    let out = cli.parse(&strings(&["stray", "--nope", "value", "-r", "fast", "more"]));
    assert_eq!(out, "");
    assert_eq!(cli.get("--run"), Some(&strings(&["fast"])[..]));
    assert_eq!(cli.get("build"), None);
    assert!(cli.args[0].values.is_empty());
}

#[test]
fn option_value_may_be_a_keyword() {
    let mut cli = CLI::new();
    cli.option("-r, --run", "Run it").unwrap().arg("build", "build", "Build");
    cli.parse(&strings(&["-r", "build", "x"]));
    assert_eq!(cli.get("--run"), Some(&strings(&["build"])[..]));
    assert_eq!(cli.get("build"), None);
}

#[test]
fn positional_captures_option_like_names_without_dash() {
    let mut cli = CLI::new();
    cli.arg("build", "build", "Build").arg("test", "test", "Test");
    cli.parse(&strings(&["build", "test", "build", "-x", "test", "t1"]));
    assert_eq!(cli.args[0].values, strings(&["test", "build", ""]));
    assert_eq!(cli.args[1].values, strings(&["t1", ""]));
}

#[test]
fn options_are_looked_up_before_positionals() {
    let mut cli = CLI::new();
    cli.arg("--both", "", "").option("--both", "").unwrap();
    cli.parse(&strings(&["--both", "v"]));
    assert_eq!(cli.options[0].value, Some("v".to_string()));
    assert!(cli.args[0].values.is_empty());
    assert_eq!(cli.get("--both"), Some(&strings(&["v"])[..]));
}

#[test]
fn first_of_two_equal_declarations_is_used() {
    let mut cli = CLI::new();
    cli.option("-a, --same", "first").unwrap().option("-b, --same", "second").unwrap();
    cli.arg("build", "one", "").arg("build", "two", "");
    cli.parse(&strings(&["--same", "x", "build", "y"]));
    assert_eq!(cli.options[0].value, Some("x".to_string()));
    assert_eq!(cli.options[1].value, None);
    assert_eq!(cli.args[0].values, strings(&["y", ""]));
    assert!(cli.args[1].values.is_empty());
    cli.parse(&strings(&["-b", "z"]));
    assert_eq!(cli.options[1].value, Some("z".to_string()));
    assert_eq!(cli.get("--same"), Some(&strings(&["x"])[..]));
}

#[test]
fn empty_token_is_a_value() {
    let mut cli = CLI::new();
    cli.option("-r, --run", "Run it").unwrap();
    cli.parse(&strings(&["-r", ""]));
    assert_eq!(cli.get("--run"), Some(&strings(&[""])[..]));
    cli.parse(&strings(&[]));
    assert_eq!(cli.get("--run"), Some(&strings(&[""])[..]));
}

#[test]
fn program_name_is_not_scanned() {
    let mut cli = CLI::new();
    cli.option("-r, --run", "Run it").unwrap().arg("build", "build", "Build");
    let out = cli.parse_args(&strings(&["--help", "-r", "fast"]));
    assert_eq!(out, "");
    assert_eq!(cli.get("--run"), Some(&strings(&["fast"])[..]));
    cli.parse_args(&strings(&["-r", "build", "x"]));
    assert_eq!(cli.get("--run"), Some(&strings(&["fast"])[..]));
    assert_eq!(cli.get("build"), Some(&strings(&["x", ""])[..]));
    assert_eq!(cli.parse_args(&strings(&["-h"])), "");
    assert_eq!(cli.parse_args(&strings(&[])), "");
    assert_eq!(cli.parse_args(&strings(&["prog", "-v"])), cli.render_version());
}

#[test]
fn get_on_undeclared_name_is_none() {
    let mut cli = CLI::new();
    assert_eq!(cli.get("--run"), None);
    assert_eq!(cli.get(""), None);
    cli.option("-r, --run", "Run it").unwrap().arg("build", "build", "Build");
    assert_eq!(cli.get("--other"), None);
    assert_eq!(cli.get("-r"), None);
    cli.parse(&strings(&["-r", "fast", "build", "a", "--other", "b"]));
    assert_eq!(cli.get("--other"), None);
    assert_eq!(cli.get("-r"), None);
    assert_eq!(cli.get("fast"), None);
}

#[test]
fn get_on_unmet_declaration_is_none() {
    let mut cli = CLI::new();
    cli.option("-r, --run", "Run it").unwrap().arg("build", "build", "Build");
    assert_eq!(cli.get("--run"), None);
    assert_eq!(cli.get("build"), None);
    cli.parse(&strings(&["other"]));
    assert_eq!(cli.get("--run"), None);
    assert_eq!(cli.get("build"), None);
}

#[test]
fn get_falls_back_to_positional_of_the_same_name() {
    let mut cli = CLI::new();
    cli.option("--same", "").unwrap().arg("--same", "", "");
    cli.args[0].values.push("held".to_string());
    assert_eq!(cli.get("--same"), Some(&strings(&["held"])[..]));
    cli.parse(&strings(&["--same"]));
    assert_eq!(cli.get("--same"), Some(&strings(&[""])[..]));
}

#[test]
fn get_is_repeatable() {
    let mut cli = CLI::new();
    cli.option("-r, --run", "Run it").unwrap().arg("build", "build", "Build");
    cli.parse(&strings(&["-r", "fast", "build", "a"]));
    let first = cli.get("--run").map(|s| s.to_vec());
    let second = cli.get("--run").map(|s| s.to_vec());
    assert_eq!(first, second);
    assert_eq!(first, Some(strings(&["fast"])));
    assert_eq!(cli.get("build"), cli.get("build"));
    assert_eq!(cli.get("nothing"), cli.get("nothing"));
}

#[test]
fn scan_keeps_the_declarations() {
    let mut cli = CLI::new();
    cli.name("demo").option("-r, --run", "Run it").unwrap().arg("build", "build [x]", "Build");
    cli.parse(&strings(&["-r", "fast", "build", "a", "-h"]));
    assert_eq!(cli.name, Some("demo"));
    assert_eq!(cli.options.len(), 1);
    assert_eq!(cli.options[0].name, "--run");
    assert_eq!(cli.options[0].short, Some("-r"));
    assert_eq!(cli.options[0].manual, "-r, --run");
    assert_eq!(cli.options[0].description, "Run it");
    assert_eq!(cli.args.len(), 1);
    assert_eq!(cli.args[0].name, "build");
    assert_eq!(cli.args[0].manual, "build [x]");
}
