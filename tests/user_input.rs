use cforge::user_input::UserInput;

#[test]
fn test_parse_command() {
    let input = ":help arg1 arg2";
    match UserInput::parse(input) {
        UserInput::Command(cmd) => {
            assert_eq!(cmd.name, "help");
            assert_eq!(cmd.args, vec!["arg1", "arg2"]);
        }
        _ => panic!("Expected Command, got Prompt"),
    }
}

#[test]
fn test_parse_prompt() {
    let input = "This is a regular prompt";
    match UserInput::parse(input) {
        UserInput::Prompt(text) => {
            assert_eq!(text, "This is a regular prompt");
        }
        _ => panic!("Expected Prompt, got Command"),
    }
}

#[test]
fn test_parse_empty_input() {
    let input = "   ";
    match UserInput::parse(input) {
        UserInput::Prompt(text) => {
            assert_eq!(text, "");
        }
        _ => panic!("Expected Prompt, got Command"),
    }
}

#[test]
fn test_parse_empty_command() {
    let input = ":";
    match UserInput::parse(input) {
        UserInput::Command(cmd) => {
            assert_eq!(cmd.name, "");
        }
        _ => panic!("Expected Prompt, got Command"),
    }
}

#[test]
fn parse_command_lowercases_and_splits_on_any_white_space() {
    match UserInput::parse("  ::MoDeL \t fast\n extra  ") {
        UserInput::Command(cmd) => {
            assert_eq!(cmd.name, "model");
            assert_eq!(cmd.args, vec!["fast", "extra"]);
        }
        _ => panic!("Expected Command, got Prompt"),
    }
}

#[test]
fn parse_prompt_is_trimmed() {
    match UserInput::parse("\n  what is : this?  \n") {
        UserInput::Prompt(text) => assert_eq!(text, "what is : this?"),
        _ => panic!("Expected Prompt, got Command"),
    }
}
