use tiny_shell::tokenize::{is_separator, split_words, tokenize_command, TokenizeError};

#[test]
fn test_keyword() {
    assert_eq!("test", tokenize_command("test".to_string()).unwrap().keyword)
}

#[test]
fn no_arg() {
    assert_eq!(0, tokenize_command("test".to_string()).unwrap().args.len())
}

#[test]
fn one_arg() {
    assert_eq!(1, tokenize_command("test one".to_string()).unwrap().args.len())
}

#[test]
fn multi_args() {
    assert_eq!(3, tokenize_command("test one two three".to_string()).unwrap().args.len())
}

#[test]
fn one_arg_is_the_second_word() {
    let c = tokenize_command("test one".to_string()).unwrap();
    assert_eq!(c.args, vec!["one".to_string()]);
}

#[test]
fn multi_args_keep_their_order() {
    let c = tokenize_command("test one two three".to_string()).unwrap();
    assert_eq!(c.keyword, "test");
    assert_eq!(c.args, vec!["one".to_string(), "two".to_string(), "three".to_string()]);
}

#[test]
fn empty_line_is_refused() {
    assert!(matches!(tokenize_command("".to_string()), Err(TokenizeError::EmptyInput)));
}

#[test]
fn blank_line_is_refused() {
    assert!(matches!(tokenize_command("   ".to_string()), Err(TokenizeError::EmptyInput)));
    assert!(matches!(tokenize_command(" \t\r\n".to_string()), Err(TokenizeError::EmptyInput)));
}

#[test]
fn runs_of_spaces_collapse() {
    let c = tokenize_command("  ls \t -l   /tmp \n".to_string()).unwrap();
    assert_eq!(c.keyword, "ls");
    assert_eq!(c.args, vec!["-l".to_string(), "/tmp".to_string()]);
}

#[test]
fn quotes_are_passed_through() {
    let c = tokenize_command("test \"one two\" three".to_string()).unwrap();
    assert_eq!(
        c.args,
        vec!["\"one".to_string(), "two\"".to_string(), "three".to_string()]
    );
}

#[test]
fn keyword_and_args_count_every_word() {
    let line = "a bb ccc dddd e";
    let words = split_words(line);
    let c = tokenize_command(line.to_string()).unwrap();
    assert_eq!(c.keyword, words[0]);
    assert_eq!(c.args.len(), words.len() - 1);
}

#[test]
fn split_matches_split_whitespace() {
    let lines = [
        "",
        "x",
        "  a  b ",
        "\u{3000}wide\u{3000}space\u{2003}em",
        "tab\there\u{85}nel\u{a0}nbsp",
        "héllo wörld ✓",
    ];
    for line in lines {
        let expected: Vec<String> = line.split_whitespace().map(|s| s.to_string()).collect();
        assert_eq!(split_words(line), expected);
    }
}

#[test]
fn separators_are_unicode_white_space() {
    for u in 0u32..0x3100 {
        if let Some(c) = char::from_u32(u) {
            assert_eq!(is_separator(c), c.is_whitespace(), "{:?}", c);
        }
    }
}
