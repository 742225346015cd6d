use argscan::manual::parse_manual;
use argscan::{ManualError, CLI};

#[test]
fn new_definition_is_empty() {
    let cli = CLI::new();
    assert!(cli.name.is_none());
    assert!(cli.version.is_none());
    assert!(cli.description.is_none());
    assert!(cli.options.is_empty());
    assert!(cli.args.is_empty());
}

#[test]
fn metadata_setters_overwrite() {
    let mut cli = CLI::new();
    cli.name("demo").version("1.2.0").description("A demo");
    assert_eq!(cli.name, Some("demo"));
    assert_eq!(cli.version, Some("1.2.0"));
    assert_eq!(cli.description, Some("A demo"));
    cli.name("other").version("2.0.0").description("");
    assert_eq!(cli.name, Some("other"));
    assert_eq!(cli.version, Some("2.0.0"));
    assert_eq!(cli.description, Some(""));
    assert!(cli.options.is_empty());
    assert!(cli.args.is_empty());
}

#[test]
fn short_and_long_form_declared() {
    let mut cli = CLI::new();
    cli.option("-r, --run", "Run it").unwrap();
    assert_eq!(cli.options.len(), 1);
    let o = &cli.options[0];
    assert_eq!(o.name, "--run");
    assert_eq!(o.short, Some("-r"));
    assert_eq!(o.manual, "-r, --run");
    assert_eq!(o.description, "Run it");
    assert_eq!(o.value, None);
}

#[test]
fn forms_do_not_depend_on_surrounding_whitespace() {
    for manual in [
        "-r,--run",
        "-r, --run",
        "  -r  ,   --run  ",
        "\t-r\t,\t--run\n",
        "\u{a0}-r\u{2003},\u{3000}--run\u{85}",
    ] {
        let mut cli = CLI::new();
        cli.option(manual, "").unwrap();
        assert_eq!(cli.options[0].name, "--run", "{:?}", manual);
        assert_eq!(cli.options[0].short, Some("-r"), "{:?}", manual);
        assert_eq!(cli.options[0].manual, manual);
    }
}

#[test]
fn long_form_alone_declared() {
    let mut cli = CLI::new();
    cli.option("  --verbose ", "Say more").unwrap();
    assert_eq!(cli.options[0].name, "--verbose");
    assert_eq!(cli.options[0].short, None);
    assert_eq!(cli.options[0].manual, "  --verbose ");
    assert_eq!(cli.options[0].value, None);
}

#[test]
fn declarations_keep_their_order() {
    let mut cli = CLI::new();
    cli.option("--one", "1").unwrap().option("-t, --two", "2").unwrap().arg("build", "build [x]", "b");
    cli.arg("build", "again", "second");
    let names: Vec<&str> = cli.options.iter().map(|o| o.name).collect();
    assert_eq!(names, vec!["--one", "--two"]);
    assert_eq!(cli.args.len(), 2);
    assert_eq!(cli.args[0].name, "build");
    assert_eq!(cli.args[0].manual, "build [x]");
    assert_eq!(cli.args[0].description, "b");
    assert!(cli.args[0].values.is_empty());
    assert_eq!(cli.args[1].manual, "again");
}

#[test]
fn parts_after_the_second_are_ignored() {
    let mut cli = CLI::new();
    cli.option("-r, --run, --extra", "").unwrap();
    assert_eq!(cli.options[0].name, "--run");
    assert_eq!(cli.options[0].short, Some("-r"));
}

#[test]
fn single_form_without_long_marker_is_refused() {
    for manual in ["run", "-r", "", "   ", " - -run", "x--run"] {
        let mut cli = CLI::new();
        let e = cli.option(manual, "").unwrap_err();
        assert!(matches!(e, ManualError::LongMarker(t) if t == manual), "{:?}", manual);
        assert!(cli.options.is_empty());
    }
}

#[test]
fn short_part_without_marker_is_refused() {
    let mut cli = CLI::new();
    let e = cli.option("  r , --run", "").unwrap_err();
    assert!(matches!(e, ManualError::ShortMarker("r ")));
    assert_eq!(e.text(), "r ");
    assert_eq!(e.message(), "short option should start with '-' (r )");
    assert!(cli.options.is_empty());
    let e = cli.option(", --run", "").unwrap_err();
    assert!(matches!(e, ManualError::ShortMarker("")));
}

#[test]
fn long_part_without_marker_is_refused() {
    let mut cli = CLI::new();
    let e = cli.option("-r, run ", "").unwrap_err();
    assert!(matches!(e, ManualError::LongMarker(" run")));
    assert_eq!(e.message(), "option should start with '--'( run)");
    let e = cli.option("-r, -run", "").unwrap_err();
    assert!(matches!(e, ManualError::LongMarker(" -run")));
    let e = cli.option("-r,", "").unwrap_err();
    assert!(matches!(e, ManualError::LongMarker("")));
    let e = cli.option("-r,,--run", "").unwrap_err();
    assert!(matches!(e, ManualError::LongMarker("")));
    assert!(cli.options.is_empty());
}

#[test]
fn short_part_is_examined_first() {
    let mut cli = CLI::new();
    let e = cli.option("r, run", "").unwrap_err();
    assert!(matches!(e, ManualError::ShortMarker("r")));
}

#[test]
fn refusal_leaves_earlier_declarations() {
    let mut cli = CLI::new();
    cli.option("--keep", "").unwrap();
    assert!(cli.option("oops", "").is_err());
    assert_eq!(cli.options.len(), 1);
    assert_eq!(cli.options[0].name, "--keep");
}

#[test]
fn single_form_error_message_names_the_declaration() {
    let mut cli = CLI::new();
    let e = cli.option(" run ", "").unwrap_err();
    assert_eq!(e.text(), " run ");
    assert_eq!(e.message(), "option should start with '--'( run )");
}

#[test]
fn parse_manual_gives_both_forms() {
    assert!(matches!(parse_manual(" -x , --name "), Ok(("--name", Some("-x")))));
    assert!(matches!(parse_manual("--name"), Ok(("--name", None))));
    assert!(matches!(parse_manual("--"), Ok(("--", None))));
    assert!(matches!(parse_manual("-, --"), Ok(("--", Some("-")))));
    assert!(matches!(parse_manual("--é, --ü"), Ok(("--ü", Some("--é")))));
    assert!(matches!(parse_manual("name"), Err(ManualError::LongMarker("name"))));
}
