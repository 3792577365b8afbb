use html_select::{parse_command_line_arguments, ArgError};

#[test]
fn test_parse_command_line_arguments() {
    let valid_args1 = vec![
        String::from("program_name"),
        String::from("-s"),
        String::from(".class_name"),
    ];
    let parsed_args1 = parse_command_line_arguments(valid_args1).unwrap();
    assert_eq!(parsed_args1.css_selector, ".class_name");
    assert_eq!(parsed_args1.input_file, None);
    assert_eq!(parsed_args1.output_file, None);

    let valid_args2 = vec![
        String::from("program_name"),
        String::from("-s"),
        String::from(".class_name"),
        String::from("-i"),
        String::from("input.html"),
    ];
    let parsed_args2 = parse_command_line_arguments(valid_args2).unwrap();
    assert_eq!(parsed_args2.css_selector, ".class_name");
    assert_eq!(parsed_args2.input_file, Some(String::from("input.html")));
    assert_eq!(parsed_args2.output_file, None);

    let valid_args3 = vec![
        String::from("program_name"),
        String::from("-s"),
        String::from(".class_name"),
        String::from("-o"),
        String::from("output.html"),
    ];
    let parsed_args3 = parse_command_line_arguments(valid_args3).unwrap();
    assert_eq!(parsed_args3.css_selector, ".class_name");
    assert_eq!(parsed_args3.input_file, None);
    assert_eq!(parsed_args3.output_file, Some(String::from("output.html")));

    let valid_args4 = vec![
        String::from("program_name"),
        String::from("-s"),
        String::from(".class_name"),
        String::from("-i"),
        String::from("input.html"),
        String::from("-o"),
        String::from("output.html"),
    ];
    let parsed_args4 = parse_command_line_arguments(valid_args4).unwrap();
    assert_eq!(parsed_args4.css_selector, ".class_name");
    assert_eq!(parsed_args4.input_file, Some(String::from("input.html")));
    assert_eq!(parsed_args4.output_file, Some(String::from("output.html")));

    let invalid_args1 = vec![String::from("program_name")];
    assert!(parse_command_line_arguments(invalid_args1).is_err());

    let invalid_args2 = vec![
        String::from("program_name"),
        String::from("-s"),
        String::from(".class_name"),
        String::from("-x"),
    ];
    assert!(parse_command_line_arguments(invalid_args2).is_err());
}

fn tokens(items: &[&str]) -> Vec<String> {
    items.iter().map(|t| t.to_string()).collect()
}

#[test]
fn selector_alone_gives_no_files() {
    let parsed = parse_command_line_arguments(tokens(&["prog", "-s", ".x"])).unwrap();
    assert_eq!(parsed.css_selector, ".x");
    assert_eq!(parsed.input_file, None);
    assert_eq!(parsed.output_file, None);
}

#[test]
fn unknown_option_is_unexpected() {
    let r = parse_command_line_arguments(tokens(&["prog", "-s", ".x", "-y"]));
    assert!(matches!(r, Err(ArgError::UnexpectedArgument(ref t)) if t == "-y"));
}

#[test]
fn missing_selector_option_is_required() {
    let r = parse_command_line_arguments(tokens(&["prog", "-i", "in.html"]));
    assert!(matches!(r, Err(ArgError::SelectorRequired)));
    let r = parse_command_line_arguments(tokens(&[]));
    assert!(matches!(r, Err(ArgError::SelectorRequired)));
}

#[test]
fn option_without_value_is_refused() {
    let r = parse_command_line_arguments(tokens(&["prog", "-s"]));
    assert!(matches!(r, Err(ArgError::ExpectedSelector)));
    let r = parse_command_line_arguments(tokens(&["prog", "-s", "a", "-i"]));
    assert!(matches!(r, Err(ArgError::ExpectedInputFile)));
    let r = parse_command_line_arguments(tokens(&["prog", "-s", "a", "-o"]));
    assert!(matches!(r, Err(ArgError::ExpectedOutputFile)));
}

#[test]
fn later_option_replaces_earlier() {
    let parsed =
        parse_command_line_arguments(tokens(&["prog", "-s", "a", "-o", "x", "-s", "b"])).unwrap();
    assert_eq!(parsed.css_selector, "b");
    assert_eq!(parsed.output_file, Some(String::from("x")));
}

#[test]
fn program_name_is_never_read_as_option() {
    let parsed = parse_command_line_arguments(tokens(&["-x", "-s", "p"])).unwrap();
    assert_eq!(parsed.css_selector, "p");
}
