use liked_export::dotenv::{parse, parse_line, remove_quotes, trim, DotenvError};

#[test]
fn test_parse_line() {
    assert_eq!(parse_line("FOO=BAR").unwrap(), ("FOO", "BAR"));
    assert_eq!(parse_line("FOO = BAR").unwrap(), ("FOO", "BAR"));
    assert_eq!(parse_line("FOO=\"BAR\"").unwrap(), ("FOO", "BAR"));
    assert_eq!(parse_line("FOO='BAR'").unwrap(), ("FOO", "BAR"));
    assert_eq!(parse_line("FOO=`BAR`").unwrap(), ("FOO", "BAR"));
    assert_eq!(parse_line("FOO=\t `BAR`").unwrap(), ("FOO", "BAR"));
    assert_eq!(parse_line("FOO\t=\t `BAR`").unwrap(), ("FOO", "BAR"));
    assert_eq!(parse_line("FOO\t=\t ` BAR`").unwrap(), ("FOO", " BAR"));
    assert_eq!(parse_line("FOO\t=\t ` BAR `").unwrap(), ("FOO", " BAR "));
    assert_eq!(
        parse_line("FOO\t   =   \t ` BAR `").unwrap(),
        ("FOO", " BAR ")
    );
    assert_eq!(
        parse_line(" FOO\t   =   \t ` BAR `").unwrap(),
        (" FOO", " BAR ")
    );
}

#[test]
fn test_remove_quotes() {
    assert_eq!(remove_quotes("BAR"), "BAR");
    assert_eq!(remove_quotes("\"BAR\""), "BAR");
    assert_eq!(remove_quotes("'BAR'"), "BAR");
    assert_eq!(remove_quotes("`BAR`"), "BAR");
    assert_eq!(remove_quotes(" `BAR`"), " `BAR`");
    assert_eq!(remove_quotes(" ` BAR`"), " ` BAR`");
    assert_eq!(remove_quotes(" ` BAR `"), " ` BAR `");
}

#[test]
fn test_parse() {
    let env_sim = r#"
FOO=BAR
# comment
FOO2= BAR2

FOO3="BAR3"
FOO4='BAR4'
FOO5=`BAR5`
"#;
    let lines: Vec<String> = env_sim.lines().map(|s| s.to_owned()).collect();
    let list = parse(&lines).unwrap();
    assert_eq!(
        list,
        vec![
            ("FOO".to_owned(), "BAR".to_owned()),
            ("FOO2".to_owned(), "BAR2".to_owned()),
            ("FOO3".to_owned(), "BAR3".to_owned()),
            ("FOO4".to_owned(), "BAR4".to_owned()),
            ("FOO5".to_owned(), "BAR5".to_owned()),
        ]
    );
}

#[test]
fn parse_line_without_equals_is_rejected() {
    assert_eq!(
        parse_line("FOO BAR"),
        Err(DotenvError::NoValue("FOO BAR".to_owned()))
    );
}

#[test]
fn parse_reports_the_first_bad_line() {
    let lines: Vec<String> = vec!["A=1".to_owned(), "# note".to_owned(), "broken".to_owned(), "B=2".to_owned()];
    assert_eq!(parse(&lines), Err(DotenvError::BadLine(3, "broken".to_owned())));
}

#[test]
fn single_quote_character_is_kept() {
    assert_eq!(remove_quotes("\""), "\"");
    assert_eq!(parse_line("K=\"").unwrap(), ("K", "\""));
}

#[test]
fn trim_strips_unicode_white_space() {
    assert_eq!(trim("\u{3000} a b \u{a0}\t"), "a b");
    assert_eq!(trim("   "), "");
}
