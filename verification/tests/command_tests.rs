use autocmd::command::get_full_command_str_from_values;

#[test]
fn no_words_is_empty() {
    let words: Vec<String> = Vec::new();
    assert_eq!(get_full_command_str_from_values(&words), "");
}

#[test]
fn one_word_stands_alone() {
    let words = vec![String::from("echo")];
    assert_eq!(get_full_command_str_from_values(&words), "echo");
}

#[test]
fn words_are_space_separated() {
    let words = vec![
        String::from("echo"),
        String::from("hi"),
        String::from("there"),
    ];
    assert_eq!(get_full_command_str_from_values(&words), "echo hi there");
}

#[test]
fn words_pass_through_verbatim() {
    let words = vec![String::from("grep"), String::from("a b"), String::from("-n")];
    assert_eq!(get_full_command_str_from_values(&words), "grep a b -n");
}
