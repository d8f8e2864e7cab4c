use heel::windows::process::{command_line, quote_arg};

#[test]
fn command_line_quotes_spaces_and_quotes() {
    let args = vec!["-c".to_string(), "print(\"hi\")".to_string()];

    assert_eq!(
        command_line("C:/Program Files/Python/python.exe", &args),
        "\"C:/Program Files/Python/python.exe\" -c \"print(\\\"hi\\\")\""
    );
}

#[test]
fn quote_arg_quotes_empty_arguments() {
    assert_eq!(quote_arg(""), "\"\"");
}

#[test]
fn quote_arg_preserves_trailing_backslashes_before_closing_quote() {
    assert_eq!(
        quote_arg(r"C:\Program Files\Python\"),
        r#""C:\Program Files\Python\\""#
    );
}

#[test]
fn quote_arg_leaves_plain_arguments_alone() {
    assert_eq!(quote_arg(r"C:\plain\path"), r"C:\plain\path");
    assert_eq!(quote_arg("-c"), "-c");
}

#[test]
fn quote_arg_escapes_backslashes_before_inner_quote() {
    assert_eq!(quote_arg(r#"a\"b"#), r#""a\\\"b""#);
    assert_eq!(quote_arg("a\tb"), "\"a\tb\"");
}

#[test]
fn command_line_without_arguments_is_the_quoted_program() {
    assert_eq!(command_line("cmd.exe", &Vec::new()), "cmd.exe");
    assert_eq!(command_line("my prog", &vec![String::new()]), "\"my prog\" \"\"");
}
