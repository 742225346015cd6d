use argscan::CLI;

#[test]
fn help_banner_of_full_definition() {
    let mut cli = CLI::new();
    cli.name("demo").version("1.2.0").description("A demo");
    cli.option("-r, --run", "Run it").unwrap().option("--quiet", "Say less").unwrap();
    let expected = [
        "\n\x1B[1m\x1B[31mdemo\x1B[0m\x1B[22m\x1B[0m, ",
        "\x1B[1m\x1B[36mv\x1B[0m\x1B[22m\x1B[0m\x1B[1m\x1B[36m1.2.0\x1B[0m\x1B[22m\x1B[0m\n",
        "\x1B[3mA demo\x1B[23m\x1B[0m\n",
        "\n\x1B[1m\x1B[33mOptions:\x1B[0m\x1B[22m\x1B[0m\n",
        "\t\x1B[34m--help\x1B[0m, \x1B[34m-h\x1B[0m \tPrint this message\n",
        "\t\x1B[34m--version\x1B[0m, \x1B[34m-v\x1B[0m \tPrint the application version\n",
        "\t\x1B[34m--run\x1B[0m, \x1B[34m-r\x1B[0m \tRun it\n",
        "\t\x1B[34m--quiet\x1B[0m, \x1B[34m\x1B[0m \tSay less\n",
        "\n",
    ]
    .join("");
    assert_eq!(cli.render_help(), expected);
}

#[test]
fn help_banner_of_empty_definition() {
    let cli = CLI::new();
    let expected = [
        "\n\x1B[1m\x1B[31mMy Program\x1B[0m\x1B[22m\x1B[0m, ",
        "\x1B[1m\x1B[36mv\x1B[0m\x1B[22m\x1B[0m\x1B[1m\x1B[36m0.0.1\x1B[0m\x1B[22m\x1B[0m\n",
        "\x1B[3m\x1B[23m\x1B[0m\n",
        "\n\x1B[1m\x1B[33mOptions:\x1B[0m\x1B[22m\x1B[0m\n",
        "\t\x1B[34m--help\x1B[0m, \x1B[34m-h\x1B[0m \tPrint this message\n",
        "\t\x1B[34m--version\x1B[0m, \x1B[34m-v\x1B[0m \tPrint the application version\n",
        "\n",
    ]
    .join("");
    assert_eq!(cli.render_help(), expected);
}

#[test]
fn help_banner_does_not_list_positionals_or_values() {
    let mut cli = CLI::new();
    cli.option("-r, --run", "Run it").unwrap().arg("build", "build [targets]", "Build things");
    let before = cli.render_help();
    let args: Vec<String> = vec!["-r".to_string(), "fast".to_string(), "build".to_string()];
    cli.parse(&args);
    assert_eq!(cli.render_help(), before);
    assert!(!before.contains("build"));
}

#[test]
fn version_banner() {
    let mut cli = CLI::new();
    assert_eq!(
        cli.render_version(),
        "\x1B[1m\x1B[34mv\x1B[0m\x1B[22m\x1B[0m\x1B[1m\x1B[34m0.0.1\x1B[0m\x1B[22m\x1B[0m\n"
    );
    cli.version("1.2.0");
    assert_eq!(
        cli.render_version(),
        "\x1B[1m\x1B[34mv\x1B[0m\x1B[22m\x1B[0m\x1B[1m\x1B[34m1.2.0\x1B[0m\x1B[22m\x1B[0m\n"
    );
}

#[test]
fn version_token_renders_version() {
    let mut cli = CLI::new();
    cli.name("demo").version("1.2.0");
    let out = cli.parse(&["--version".to_string()]);
    assert_eq!(out, cli.render_version());
    assert!(out.contains("1.2.0"));
    assert!(!out.contains("demo"));
}
