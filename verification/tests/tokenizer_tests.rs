use minishell::tokenize::parse_input;
use minishell::tokenize::read_command;

fn words(input: &str) -> Vec<String> {
    parse_input(input)
}

#[test]
fn splits_on_spaces() {
    assert_eq!(words("echo hello world"), vec!["echo", "hello", "world"]);
}

#[test]
fn preserves_spaces_inside_quotes() {
    assert_eq!(words("echo 'a  b' \"c d\""), vec!["echo", "a  b", "c d"]);
}

#[test]
fn escaped_space_does_not_split() {
    assert_eq!(words("echo a\\ b"), vec!["echo", "a b"]);
}

#[test]
fn escaped_quote_inside_double_quotes() {
    assert_eq!(words("echo \"a\\\"b\""), vec!["echo", "a\"b"]);
}

#[test]
fn collapses_runs_of_spaces() {
    assert_eq!(words("a   b"), vec!["a", "b"]);
    assert_eq!(words("  a  "), vec!["a"]);
}

#[test]
fn empty_and_blank_input_yield_no_words() {
    assert_eq!(words(""), Vec::<String>::new());
    assert_eq!(words("   "), Vec::<String>::new());
}

#[test]
fn single_quotes_preserve_backslash_and_double_quote() {
    assert_eq!(words("'a\\b'"), vec!["a\\b"]);
    assert_eq!(words("'a\"b'"), vec!["a\"b"]);
}

#[test]
fn double_quote_escapes_backslash_and_dollar() {
    assert_eq!(words("\"a\\\\b\""), vec!["a\\b"]);
    assert_eq!(words("\"a\\$b\""), vec!["a$b"]);
}

#[test]
fn double_quote_keeps_other_backslashes() {
    assert_eq!(words("\"a\\nb\""), vec!["a\\nb"]);
    assert_eq!(words("\"a\\ b\""), vec!["a\\ b"]);
}

#[test]
fn double_quote_drops_escaped_newline() {
    assert_eq!(words("\"a\\\nb\""), vec!["ab"]);
}

#[test]
fn unquoted_backslash_escapes_next_char() {
    assert_eq!(words("a\\'b"), vec!["a'b"]);
    assert_eq!(words("a\\\"b"), vec!["a\"b"]);
    assert_eq!(words("a\\\\b"), vec!["a\\b"]);
}

#[test]
fn trailing_backslash_is_dropped() {
    assert_eq!(words("ab\\"), vec!["ab"]);
}

#[test]
fn empty_quotes_yield_no_word() {
    assert_eq!(words("''"), Vec::<String>::new());
    assert_eq!(words("\"\""), Vec::<String>::new());
    assert_eq!(words("a '' b"), vec!["a", "b"]);
}

#[test]
fn quotes_join_adjacent_text_into_one_word() {
    assert_eq!(words("a'b c'd"), vec!["ab cd"]);
}

#[test]
fn unterminated_quote_is_implicitly_closed() {
    assert_eq!(words("'a b"), vec!["a b"]);
    assert_eq!(words("\"a b"), vec!["a b"]);
}

#[test]
fn read_command_trims_and_skips_blank_lines() {
    assert_eq!(read_command("  echo hi \n"), Some(vec![String::from("echo"), String::from("hi")]));
    assert_eq!(read_command("\n"), None);
    assert_eq!(read_command("   "), None);
    assert_eq!(read_command("''"), None);
}

fn requote(ws: &[String]) -> String {
    let quoted: Vec<String> = ws.iter().map(|w| format!("'{}'", w)).collect();
    quoted.join(" ")
}

#[test]
fn requoting_output_reproduces_words() {
    let first = words("echo 'a  b' c\\ d \"e f\"");
    assert_eq!(first, vec!["echo", "a  b", "c d", "e f"]);
    let second = words(&requote(&first));
    assert_eq!(second, first);
}

#[test]
fn requoting_single_word_reproduces_it() {
    let first = words("hello");
    let second = words(&requote(&first));
    assert_eq!(second, first);
}
