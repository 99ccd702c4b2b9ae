use crab_shell_core::command::{parse_input, Command, TokenizeError};

fn command(name: &str, args: &[&str]) -> Command {
    Command {
        command: name.to_string(),
        arguments: args.iter().map(|a| a.to_string()).collect(),
    }
}

#[test]
fn string_parser() {
    let result = parse_input("welcome to \"the league of\" legends".to_string());
    let target = Command {
        command: String::from("welcome"),
        arguments: vec![
            "to".to_string(),
            "the league of".to_string(),
            "legends".to_string(),
        ],
    };
    assert_eq!(Ok(target), result);
}

#[test]
fn string_parser_extra_spaces() {
    let result = parse_input("welcome to   \"the league of\" legends  ".to_string());
    let target = Command {
        command: String::from("welcome"),
        arguments: vec![
            "to".to_string(),
            "the league of".to_string(),
            "legends".to_string(),
        ],
    };
    assert_eq!(Ok(target), result);
}

#[test]
fn string_parser_non_closing_quotes() {
    let result = parse_input("welcome to   \"the league of legends  ".to_string());
    let target = Command {
        command: String::from("welcome"),
        arguments: vec!["to".to_string(), "the league of legends  ".to_string()],
    };
    assert_ne!(Ok(target), result);
    assert_eq!(result, Err(TokenizeError::UnterminatedQuote));
}

#[test]
fn string_parser_empty_cmd() {
    let result = parse_input("".to_string());
    let target = Command {
        command: "".to_string(),
        arguments: vec![],
    };
    assert_eq!(Ok(target), result);
}

#[test]
fn only_spaces_is_a_blank_line() {
    assert_eq!(parse_input("     ".to_string()), Ok(command("", &[])));
}

#[test]
fn name_without_arguments() {
    assert_eq!(parse_input("ls".to_string()), Ok(command("ls", &[])));
    assert_eq!(parse_input("  ls  ".to_string()), Ok(command("ls", &[])));
}

#[test]
fn unquoted_line_splits_on_spaces() {
    let line = "  cp   -r  src/a   dst ";
    let words: Vec<String> = line
        .split(' ')
        .filter(|f| !f.trim().is_empty())
        .map(|f| f.to_string())
        .collect();
    let parsed = parse_input(line.to_string()).unwrap();
    assert_eq!(parsed.command, words[0]);
    assert_eq!(parsed.arguments, words[1..].to_vec());
    assert_eq!(parsed, command("cp", &["-r", "src/a", "dst"]));
}

#[test]
fn tab_is_part_of_a_token() {
    assert_eq!(
        parse_input("echo a\tb".to_string()),
        Ok(command("echo", &["a\tb"]))
    );
}

#[test]
fn blank_token_is_dropped() {
    assert_eq!(parse_input("echo \t x".to_string()), Ok(command("echo", &["x"])));
    assert_eq!(parse_input("\t ls".to_string()), Ok(command("ls", &[])));
    assert_eq!(parse_input("echo \"  \" x".to_string()), Ok(command("echo", &["x"])));
    assert_eq!(parse_input("echo \"\" x".to_string()), Ok(command("echo", &["x"])));
}

#[test]
fn quotes_inside_a_token_only_toggle() {
    assert_eq!(
        parse_input("echo ab\"c d\"ef".to_string()),
        Ok(command("echo", &["abc def"]))
    );
    assert_eq!(
        parse_input("\"my program\" --flag".to_string()),
        Ok(command("my program", &["--flag"]))
    );
}

#[test]
fn quoted_segment_keeps_its_spaces() {
    let parsed = parse_input("say \"  two  spaces  \"".to_string()).unwrap();
    assert_eq!(parsed, command("say", &["  two  spaces  "]));
    assert!(parsed.arguments.iter().all(|a| !a.contains('"')));
}

#[test]
fn open_quote_is_refused() {
    assert_eq!(
        parse_input("\"".to_string()),
        Err(TokenizeError::UnterminatedQuote)
    );
    assert_eq!(
        parse_input("echo \"a\" \"b".to_string()),
        Err(TokenizeError::UnterminatedQuote)
    );
    assert_eq!(
        parse_input("echo a\"".to_string()),
        Err(TokenizeError::UnterminatedQuote)
    );
}

#[test]
fn closed_quotes_are_accepted() {
    assert_eq!(parse_input("\"\"".to_string()), Ok(command("", &[])));
    assert_eq!(
        parse_input("echo \"a\" \"b\"".to_string()),
        Ok(command("echo", &["a", "b"]))
    );
}

#[test]
fn tokenize_error_message() {
    assert_eq!(TokenizeError::UnterminatedQuote.message(), "Unterminated quote.");
}
