use cl::cli::subcommands::exec::{
    append_options, clean_named_parameter, prepare_command as prepare_with_args, replace_placeholders,
    validate_named_parameters, ExecError, DEFAULT_NAMED_PARAMS_ERROR_MESSAGE,
    INVALID_NAMED_PARAMS_ERROR_MESSAGE,
};
use cl::cli::subcommands::exec_equals::prepare_command as prepare_equals;
use cl::cli::utils::{prepare_command, INVALID_NAMED_PARAMS_VALUE_ERROR_MESSAGE};
use cl::command::CommandError;

#[test]
fn should_prepare_simple_command() {
    let result = prepare_command(String::from("echo hello"), vec![], vec![]);
    assert_eq!(result.is_ok(), true);
    assert_eq!(result.unwrap(), "echo hello");
}

#[test]
fn mod_should_prepare_a_command_with_named_parameters() {
    let result = prepare_command(
        String::from("echo #{name}"),
        vec![String::from("--name"), String::from("unit_test")],
        vec![],
    );
    assert_eq!(result.is_ok(), true);
    assert_eq!(result.unwrap(), "echo unit_test");
}

#[test]
fn mod_should_return_error_when_an_invalid_named_parameter_is_given() {
    let named_args: Vec<String> = vec![String::from("--invalid"), String::from("unit_test")];
    let result = prepare_command(String::from("echo #{name}"), named_args.clone(), vec![]);
    assert_eq!(result.is_err(), true);
    assert_eq!(
        result.unwrap_err().to_string(),
        format!(
            "Cannot build the command with these arguments: {}\n\n{}",
            named_args.join(", "),
            DEFAULT_NAMED_PARAMS_ERROR_MESSAGE
        ),
    );
}

#[test]
fn should_return_error_when_an_invalid_named_parameter_value_is_given() {
    let named_args: Vec<String> = vec![String::from("--name")];
    let result = prepare_command(String::from("echo #{name}"), named_args.clone(), vec![]);
    assert_eq!(result.is_err(), true);
    assert_eq!(
        result.unwrap_err().to_string(),
        format!(
            "Cannot run the command echo #{{name}} with the provided arguments\n\n{}",
            INVALID_NAMED_PARAMS_VALUE_ERROR_MESSAGE
        )
    );
}

#[test]
fn utils_should_append_the_other_arguments() {
    let result = prepare_command(
        String::from("echo #{name}"),
        vec![String::from("--name=unit_test")],
        vec![String::from("-n"), String::from("x")],
    );
    assert_eq!(result.unwrap(), "echo unit_test -n x");
}

#[test]
fn utils_should_refuse_when_no_named_argument_is_given() {
    let result = prepare_command(String::from("echo #{name}"), vec![], vec![]);
    assert_eq!(
        result.unwrap_err(),
        format!(
            "Cannot run the command echo #{{name}}\n\n{}",
            DEFAULT_NAMED_PARAMS_ERROR_MESSAGE
        )
    );
}

#[test]
fn utils_should_take_the_value_up_to_a_second_equal_sign() {
    let result = prepare_command(
        String::from("echo #{a}"),
        vec![String::from("--a=b=c")],
        vec![],
    );
    assert_eq!(result.unwrap(), "echo b");
}

#[test]
fn exec_should_prepare_a_simple_command() {
    let result = prepare_equals(String::from("echo hello"), vec![]);
    assert!(result.is_ok());
    assert_eq!(result.unwrap(), "echo hello");
}

#[test]
fn exec_should_prepare_a_command_with_named_parameters() {
    let result = prepare_equals(
        String::from("echo #{name}"),
        vec![String::from("--name=unit_test")],
    );
    assert!(result.is_ok());
    assert_eq!(result.unwrap(), "echo unit_test");
}

#[test]
fn exec_should_return_error_when_an_invalid_named_parameter_is_given() {
    let named_parameters: Vec<String> = vec![String::from("--invalid=unit_test")];
    let command = String::from("echo #{name}");
    let result = prepare_equals(command.clone(), named_parameters);
    assert!(result.is_err());
    assert_eq!(
        result.unwrap_err().to_string(),
        format!("Cannot run the command `{command}`\n\n{DEFAULT_NAMED_PARAMS_ERROR_MESSAGE}"),
    );
}

#[test]
fn exec_equals_should_report_a_missing_key() {
    let result = prepare_equals(
        String::from("echo #{name} #{other}"),
        vec![String::from("--name=a")],
    );
    assert_eq!(result.unwrap_err(), "KeyError(Invalid key: other)");
}

#[test]
fn exec_equals_should_append_the_options() {
    let result = prepare_equals(
        String::from("echo #{name}"),
        vec![String::from("--name=a"), String::from("--flag"), String::from("x=1")],
    );
    assert_eq!(result.unwrap(), "echo a --flag x=1");
}

#[test]
fn mod_should_prepare_a_simple_command() {
    let result = prepare_with_args(String::from("echo hello"), vec![]);
    assert_eq!(result.unwrap(), "echo hello");
}

#[test]
fn should_prepare_a_command_with_named_parameters() {
    let result = prepare_with_args(
        String::from("echo #{name}"),
        vec![String::from("--name=unit_test")],
    );
    assert!(result.is_ok());
    assert_eq!(result.unwrap(), "echo unit_test");
}

#[test]
fn should_return_error_when_an_invalid_named_parameter_is_given() {
    let named_parameters: Vec<String> = vec![String::from("--invalid=unit_test")];
    let command = String::from("echo #{name}");
    let result = prepare_with_args(command.clone(), named_parameters);
    assert!(result.is_err());
    assert_eq!(
        result.unwrap_err().to_string(),
        CommandError::CannotRunCommand {
            command,
            cause: DEFAULT_NAMED_PARAMS_ERROR_MESSAGE.to_owned()
        }
        .to_string()
    );
}

#[test]
fn should_append_the_options_to_the_command() {
    let command = String::from("echo Hello");
    let args = vec![String::from("World")];
    let result = prepare_with_args(command.clone(), args.clone());

    assert!(result.is_ok());
    assert_eq!(result.unwrap(), format!("{} {}", command, args[0]));
}

#[test]
fn exec_should_take_a_named_parameter_and_its_value_apart() {
    let result = prepare_with_args(
        String::from("echo #{name}"),
        vec![String::from("--name"), String::from("unit_test")],
    );
    assert_eq!(result.unwrap(), "echo unit_test");
}

#[test]
fn exec_should_clean_a_placeholder() {
    assert_eq!(clean_named_parameter("#{name}"), "name");
    assert_eq!(append_options("echo", vec![]), "echo");
    assert_eq!(
        append_options("echo", vec![String::from("a"), String::from("b")]),
        "echo a b"
    );
}

#[test]
fn exec_should_name_the_missing_parameter() {
    let result = replace_placeholders(
        String::from("echo #{name} #{other}"),
        &vec![(String::from("name"), String::from("x"))],
    );
    let error = result.unwrap_err();
    assert_eq!(error.to_string(), "Missing a named parameter: other");
}

#[test]
fn exec_should_report_a_broken_placeholder() {
    let result = replace_placeholders(String::from("echo #{name"), &vec![(String::from("name"), String::from("x"))]);
    let error = result.unwrap_err();
    assert!(matches!(error, ExecError::GenericError));
    assert_eq!(error.to_string(), "An error ocurred while parsing your command");
}

#[test]
fn exec_should_replace_every_placeholder() {
    let result = replace_placeholders(
        String::from("echo #{a}-#{b}"),
        &vec![(String::from("a"), String::from("1")), (String::from("b"), String::from("2"))],
    );
    assert_eq!(result.unwrap(), "echo 1-2");
}

#[test]
fn exec_should_refuse_named_parameters_without_a_name() {
    let none = validate_named_parameters(&vec![], "echo #{a}");
    assert_eq!(
        none.unwrap_err().to_string(),
        CommandError::CannotRunCommand {
            command: String::from("echo #{a}"),
            cause: DEFAULT_NAMED_PARAMS_ERROR_MESSAGE.to_owned()
        }
        .to_string()
    );
    let unnamed = validate_named_parameters(&vec![(String::new(), String::from("v"))], "echo #{a}");
    assert_eq!(
        unnamed.unwrap_err().to_string(),
        CommandError::CannotRunCommand {
            command: String::from("echo #{a}"),
            cause: INVALID_NAMED_PARAMS_ERROR_MESSAGE.to_owned()
        }
        .to_string()
    );
    assert!(validate_named_parameters(&vec![(String::from("a"), String::new())], "echo #{a}").is_ok());
}
