use shell_lexer::commands::{CdCommand, EchoCommand, TypeCommand};
use shell_lexer::lexing::ScanErrorKind;
use shell_lexer::line_parser::LineParser;
use shell_lexer::shell::{BuiltIn, Shell};

fn strings(words: &[&str]) -> Vec<String> {
    words.iter().map(|w| w.to_string()).collect()
}

#[test]
fn line_parser_splits_at_ascii_whitespace() {
    assert_eq!(
        LineParser::parse("  echo\thello \r\n world\x0c! ".to_string()),
        strings(&["echo", "hello", "world", "!"])
    );
    assert_eq!(LineParser::parse("".to_string()), Vec::<String>::new());
    assert_eq!(LineParser::parse("   ".to_string()), Vec::<String>::new());
    assert_eq!(LineParser::parse("'a b'".to_string()), strings(&["'a", "b'"]));
}

#[test]
fn arguments_are_the_word_texts() {
    assert_eq!(
        Shell::arguments("echo 'hello  world' x\"y\"".to_string()).unwrap(),
        strings(&["echo", "hello  world", "xy"])
    );
    assert_eq!(Shell::arguments("   ".to_string()).unwrap(), Vec::<String>::new());
    assert_eq!(
        Shell::arguments("echo 'oops".to_string()).unwrap_err().kind,
        ScanErrorKind::UnterminatedSingleQuote
    );
}

#[test]
fn built_in_names_are_recognised() {
    let shell = Shell::new();
    assert_eq!(Shell::get_built_in_commands(), strings(&["exit", "echo", "type", "pwd", "cd"]));
    assert!(shell.is_built_in(&"cd".to_string()));
    assert!(shell.is_built_in(&"exit".to_string()));
    assert!(!shell.is_built_in(&"ls".to_string()));
    assert!(!shell.is_built_in(&"ech".to_string()));
    assert_eq!(shell.built_in(&"exit".to_string()), Some(BuiltIn::Exit));
    assert_eq!(shell.built_in(&"echo".to_string()), Some(BuiltIn::Echo));
    assert_eq!(shell.built_in(&"type".to_string()), Some(BuiltIn::Type));
    assert_eq!(shell.built_in(&"pwd".to_string()), Some(BuiltIn::Pwd));
    assert_eq!(shell.built_in(&"cd".to_string()), Some(BuiltIn::Cd));
    assert_eq!(shell.built_in(&"cat".to_string()), None);
}

#[test]
fn echo_text_puts_each_argument_on_its_line() {
    assert_eq!(EchoCommand::render(&strings(&["echo", "a", "b", "c"])), "a \nb \nc\n");
    assert_eq!(EchoCommand::render(&strings(&["echo", "only"])), "only\n");
    assert_eq!(EchoCommand::render(&strings(&["echo"])), "");
}

#[test]
fn cd_target_expands_tilde() {
    let home = Some("/home/me".to_string());
    assert_eq!(CdCommand::target(&strings(&["cd", "~/src"]), home.clone()), "/home/me/src");
    assert_eq!(CdCommand::target(&strings(&["cd"]), home.clone()), "/home/me");
    assert_eq!(CdCommand::target(&strings(&["cd", "/tmp"]), home), "/tmp");
    assert_eq!(CdCommand::target(&strings(&["cd", "~/x"]), None), "~/x");
    assert_eq!(CdCommand::target(&strings(&["cd"]), None), "~");
}

#[test]
fn type_reports_built_ins_paths_and_misses() {
    let name = "echo".to_string();
    assert_eq!(
        TypeCommand::describe(&name, true, None),
        Ok("echo is a shell builtin".to_string())
    );
    let name = "ls".to_string();
    assert_eq!(
        TypeCommand::describe(&name, false, Some("/bin/ls".to_string())),
        Ok("ls is /bin/ls".to_string())
    );
    let name = "nope".to_string();
    assert_eq!(TypeCommand::describe(&name, false, None), Err("nope: not found".to_string()));
}
