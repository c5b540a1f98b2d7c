use cl::cli::subcommands::exec::fill_named_parameters;
use cl::cli::subcommands::exec_equals::fill_named_parameters as fill_equals;

#[test]
fn filling_found_placeholders_replaces_them_and_appends_options() {
    let result = fill_named_parameters(
        String::from("echo #{name}"),
        vec![String::from("#{name}")],
        vec![String::from("--name"), String::from("world"), String::from("-x")],
    );
    assert_eq!(result.unwrap(), "echo world -x");
}

#[test]
fn filling_without_found_placeholders_only_appends_the_arguments() {
    let result = fill_named_parameters(
        String::from("echo #{name}"),
        vec![],
        vec![String::from("--name"), String::from("world")],
    );
    assert_eq!(result.unwrap(), "echo #{name} --name world");
}

#[test]
fn filling_with_equals_form_uses_the_found_placeholders() {
    let result = fill_equals(
        String::from("echo #{name}"),
        vec![String::from("#{name}")],
        vec![String::from("--name=world")],
    );
    assert_eq!(result.unwrap(), "echo world");

    let result = fill_equals(
        String::from("echo #{name}"),
        vec![],
        vec![String::from("--name=world")],
    );
    assert_eq!(result.unwrap(), "echo #{name} --name=world");
}
