use pipec::parser::{split_pipeline, ParseError};

fn assert_parse(pipeline: &str, expected: &[&str]) {
    assert_eq!(split_pipeline(pipeline).unwrap().as_slice(), expected);
}

#[test]
fn test_single_command() {
    assert_parse("echo a", &["echo a"]);
}

#[test]
fn test_simple_pipeline() {
    assert_parse("echo a | cat", &["echo a", "cat"]);

    assert_parse("echo a|cat", &["echo a", "cat"]);
}

#[test]
fn test_group_pipeline() {
    assert_parse("{ echo a; echo b }|cat", &["{ echo a; echo b }", "cat"]);
}

#[test]
fn test_subshell_pipeline() {
    assert_parse("( echo a; echo b )|cat", &["( echo a; echo b )", "cat"]);
}

#[test]
fn test_double_quoted_strings() {
    assert_parse(r#"cat file | grep "a|b""#, &["cat file", r#"grep "a|b""#]);

    assert_parse(r#"cat file | grep "a\"|b""#, &["cat file", r#"grep "a\"|b""#]);
}

#[test]
fn test_single_quoted_strings() {
    assert_parse("cat file | grep 'a|b'", &["cat file", "grep 'a|b'"]);
}

#[test]
fn errors_tell_what_is_wrong() {
    assert!(matches!(split_pipeline("echo )"), Err(ParseError::UnexpectedClose)));
    assert!(matches!(split_pipeline("echo 'a"), Err(ParseError::UnexpectedEnd)));
    assert!(matches!(split_pipeline("(echo a"), Err(ParseError::UnexpectedEnd)));
    assert!(matches!(split_pipeline("echo a | | cat"), Err(ParseError::EmptyCommand)));
    assert!(matches!(split_pipeline(""), Err(ParseError::EmptyCommand)));
}

/// What a pipeline is split into is not split any further, and is put together again.
#[test]
fn commands_are_read_back() {
    let pipeline = "curl -s 'a|b' | jq -r '.items[] | .host' | ( sort | uniq )";
    let commands = split_pipeline(pipeline).unwrap();
    assert_eq!(commands, ["curl -s 'a|b'", "jq -r '.items[] | .host'", "( sort | uniq )"]);
    for command in &commands {
        assert_eq!(split_pipeline(command).unwrap(), [*command]);
    }
    assert_eq!(commands.join(" | "), pipeline);
}
